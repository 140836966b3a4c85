//! The point value type: a fixed-point 2-D position plus an RGB tag.
//!
//! The tag is only a rendering hint (control points are drawn differently
//! from generated curve points); it carries no geometric meaning.

use crate::fixed::{coord_ok, lerp, lerp_coord};
use vstd::prelude::*;

verus! {

/// A 2-D vector in fixed-point coordinates.
#[derive(Clone, Copy, Debug, PartialEq, Eq)]
pub struct Vec2 {
    pub x: i64,
    pub y: i64,
}

/// Both components lie within the coordinate limit.
pub open spec fn vec2_ok(v: Vec2) -> bool {
    coord_ok(v.x as int) && coord_ok(v.y as int)
}

/// Componentwise blend of two positions at fraction `t / FIXED_ONE`.
pub open spec fn lerp_vec(a: Vec2, b: Vec2, t: int) -> Vec2 {
    Vec2 { x: lerp(a.x as int, b.x as int, t) as i64, y: lerp(a.y as int, b.y as int, t) as i64 }
}

impl Vec2 {
    pub fn new(x: i64, y: i64) -> (v: Vec2)
        ensures
            v == (Vec2 { x, y }),
    {
        Vec2 { x, y }
    }
}

/// Blend two positions at fraction `t / FIXED_ONE`, exactly as [`lerp_vec`]
/// describes.
pub fn lerp_position(a: Vec2, b: Vec2, t: i64) -> (r: Vec2)
    requires
        vec2_ok(a),
        vec2_ok(b),
        0 <= t <= crate::fixed::FIXED_ONE,
    ensures
        r == lerp_vec(a, b, t as int),
        vec2_ok(r),
{
    Vec2 { x: lerp_coord(a.x, b.x, t), y: lerp_coord(a.y, b.y, t) }
}

/// The neutral tag given to generated curve points.
pub open spec fn generated_color() -> (u8, u8, u8) {
    (255u8, 255u8, 255u8)
}

/// The tag given to the user's control points in a rendered frame.
pub open spec fn control_color() -> (u8, u8, u8) {
    (255u8, 0u8, 0u8)
}

/// The tag given to the animated curve points in a rendered frame.
pub open spec fn curve_color() -> (u8, u8, u8) {
    (0u8, 255u8, 0u8)
}

/// An immutable point value: position plus RGB tag.  Equality is
/// structural; the tag takes part in it.
#[derive(Clone, Copy, Debug, PartialEq, Eq)]
pub struct Point {
    pub position: Vec2,
    pub color: (u8, u8, u8),
}

impl Point {
    /// A point with the neutral tag.
    pub fn new(x: i64, y: i64) -> (p: Point)
        ensures
            p == (Point { position: Vec2 { x, y }, color: generated_color() }),
    {
        Point { position: Vec2 { x, y }, color: (255, 255, 255) }
    }

    /// A point with an explicit tag.
    pub fn with_color(x: i64, y: i64, color: (u8, u8, u8)) -> (p: Point)
        ensures
            p == (Point { position: Vec2 { x, y }, color }),
    {
        Point { position: Vec2 { x, y }, color }
    }
}

/// Every point of the sequence lies within the coordinate limit.
pub open spec fn points_ok(s: Seq<Point>) -> bool {
    forall|i: int| 0 <= i < s.len() ==> vec2_ok(#[trigger] s[i].position)
}

} // verus!
