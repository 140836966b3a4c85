//! The curve animator: corner-cutting refinement of an open polyline, a
//! step state machine that cycles through refinement levels, and the
//! interpolation that renders a frame between two neighbouring levels.

use crate::fixed::{FIXED_ONE, QUARTER, THREE_QUARTERS};
use crate::point::{
    control_color, curve_color, generated_color, lerp_position, lerp_vec, points_ok, vec2_ok,
    Point, Vec2,
};
use vstd::prelude::*;

verus! {

/// Number of refinement levels in one animation cycle.
pub const MAX_STEPS: usize = 7;

/// One corner-cutting pass over an open polyline of length `n >= 2` yields
/// `2 * n` points: the two endpoints kept as they are, and for every
/// segment the two points at one quarter and at three quarters of it.
/// This function gives the point at index `k` of that output.
pub open spec fn refine_at(s: Seq<Point>, k: int) -> Point {
    let n = s.len() as int;
    if k == 0 {
        s[0]
    } else if k == 2 * n - 1 {
        s[n - 1]
    } else {
        let i = (k - 1) / 2;
        if (k - 1) % 2 == 0 {
            Point {
                position: lerp_vec(s[i].position, s[i + 1].position, QUARTER as int),
                color: generated_color(),
            }
        } else {
            Point {
                position: lerp_vec(s[i].position, s[i + 1].position, THREE_QUARTERS as int),
                color: generated_color(),
            }
        }
    }
}

/// One corner-cutting pass: the identity on sequences shorter than two
/// points, and the `2 * n` points of [`refine_at`] otherwise.
pub open spec fn refine_spec(s: Seq<Point>) -> Seq<Point> {
    if s.len() < 2 {
        s
    } else {
        Seq::new(2 * s.len(), |k: int| refine_at(s, k))
    }
}

/// Corner cutting keeps every point within the coordinate limit.
pub proof fn lemma_refine_preserves_ok(s: Seq<Point>)
    requires
        points_ok(s),
    ensures
        points_ok(refine_spec(s)),
{
    if s.len() >= 2 {
        assert forall|k: int| 0 <= k < refine_spec(s).len() implies vec2_ok(
            #[trigger] refine_spec(s)[k].position,
        ) by {
            let n = s.len() as int;
            if k != 0 && k != 2 * n - 1 {
                let i = (k - 1) / 2;
                assert(0 <= i < n - 1) by {
                    assert(1 <= k <= 2 * n - 2);
                    assert((2 * n - 2 - 1) / 2 == n - 2);
                };
                let a = s[i].position;
                let b = s[i + 1].position;
                crate::fixed::lemma_lerp_bounds(a.x as int, b.x as int, QUARTER as int);
                crate::fixed::lemma_lerp_bounds(a.y as int, b.y as int, QUARTER as int);
                crate::fixed::lemma_lerp_bounds(a.x as int, b.x as int, THREE_QUARTERS as int);
                crate::fixed::lemma_lerp_bounds(a.y as int, b.y as int, THREE_QUARTERS as int);
            }
        }
    }
}

/// The point at index `i` of an elementwise blend of two equally long
/// sequences: positions blended at fraction `t / FIXED_ONE`; tags are not
/// blended, every point carries the fixed neutral tag, as in the
/// different-length case.
pub open spec fn interp_equal_point(a: Seq<Point>, b: Seq<Point>, t: int, i: int) -> Point {
    Point { position: lerp_vec(a[i].position, b[i].position, t), color: generated_color() }
}

/// Elementwise blend of two equally long sequences.
pub open spec fn interp_equal(a: Seq<Point>, b: Seq<Point>, t: int) -> Seq<Point> {
    Seq::new(a.len(), |i: int| interp_equal_point(a, b, t, i))
}

/// Length of the blend of two sequences of different lengths: the denser
/// side's, but never below two, because the two endpoints are always
/// produced.
pub open spec fn unequal_len(cur: Seq<Point>, nxt: Seq<Point>) -> int {
    let d = if cur.len() >= nxt.len() {
        cur.len() as int
    } else {
        nxt.len() as int
    };
    if d < 2 {
        2
    } else {
        d
    }
}

/// For interior index `i` of the denser side (of length `dlen`), the index
/// in the sparser side (of length `slen`) whose normalized position starts
/// the bracketing pair.
pub open spec fn bracket_base(i: int, dlen: int, slen: int) -> int {
    i * (slen - 1) / (dlen - 1)
}

/// The fixed-point fraction of the way from the bracketing pair's first
/// normalized position to its second at which the dense index `i` sits.
pub open spec fn bracket_frac(i: int, dlen: int, slen: int) -> int {
    ((i * (slen - 1)) % (dlen - 1)) * (FIXED_ONE as int) / (dlen - 1)
}

/// The virtual position that the sparser sequence `sp` offers for the
/// interior index `i` of a denser side of length `dlen`: the bracketing
/// pair of `sp`, blended at the local fraction.  A one-point sequence has
/// no bracket and offers its only point.
pub open spec fn resample_pos(sp: Seq<Point>, i: int, dlen: int) -> Vec2 {
    if sp.len() <= 1 {
        sp[0].position
    } else {
        let j = bracket_base(i, dlen, sp.len() as int);
        lerp_vec(sp[j].position, sp[j + 1].position, bracket_frac(i, dlen, sp.len() as int))
    }
}

/// The point at index `i` of the blend of two sequences of different
/// lengths: endpoints blend endpoint to endpoint; an interior point of the
/// denser side blends towards (or from) the virtual position the sparser
/// side offers for it.  All points carry the neutral tag.
pub open spec fn unequal_point(cur: Seq<Point>, nxt: Seq<Point>, t: int, i: int) -> Point {
    let len = unequal_len(cur, nxt);
    if i == 0 {
        Point { position: lerp_vec(cur[0].position, nxt[0].position, t), color: generated_color() }
    } else if i == len - 1 {
        Point {
            position: lerp_vec(
                cur[cur.len() - 1].position,
                nxt[nxt.len() - 1].position,
                t,
            ),
            color: generated_color(),
        }
    } else if cur.len() > nxt.len() {
        Point {
            position: lerp_vec(cur[i].position, resample_pos(nxt, i, cur.len() as int), t),
            color: generated_color(),
        }
    } else {
        Point {
            position: lerp_vec(resample_pos(cur, i, nxt.len() as int), nxt[i].position, t),
            color: generated_color(),
        }
    }
}

/// Blend of two nonempty sequences of different lengths.
pub open spec fn interp_unequal(cur: Seq<Point>, nxt: Seq<Point>, t: int) -> Seq<Point> {
    Seq::new(unequal_len(cur, nxt) as nat, |i: int| unequal_point(cur, nxt, t, i))
}

/// Blend of two point sequences at fraction `t / FIXED_ONE`: an empty side
/// yields the other side unchanged; equal lengths blend elementwise;
/// different lengths resample against the sparser side.
pub open spec fn interpolate_spec(cur: Seq<Point>, nxt: Seq<Point>, t: int) -> Seq<Point> {
    if cur.len() == 0 {
        nxt
    } else if nxt.len() == 0 {
        cur
    } else if cur.len() == nxt.len() {
        interp_equal(cur, nxt, t)
    } else {
        interp_unequal(cur, nxt, t)
    }
}

/// How far one tick of `delta` fixed-point seconds moves the progress
/// fraction: `delta` scaled by the state's speed factor.
pub open spec fn progress_increment(s: AnimState, delta: int) -> int {
    delta * s.speed / (FIXED_ONE as int)
}

/// The clock part of one tick: progress advances by the scaled increment;
/// crossing one whole unit wraps it to zero, advances the level cyclically
/// and promotes the next level to current, leaving the next level empty.
pub open spec fn advance_state(s: AnimState, delta: int) -> AnimState {
    let p = s.progress + progress_increment(s, delta);
    if p >= FIXED_ONE {
        AnimState {
            original: s.original,
            current: s.next,
            next: Seq::<Point>::empty(),
            progress: 0,
            step_idx: (s.step_idx + 1) % s.max_steps,
            max_steps: s.max_steps,
            speed: s.speed,
        }
    } else {
        AnimState {
            original: s.original,
            current: s.current,
            next: s.next,
            progress: p,
            step_idx: s.step_idx,
            max_steps: s.max_steps,
            speed: s.speed,
        }
    }
}

/// The table part of one tick: when no next level is computed yet, the
/// level index decides it.  At the cycle's start the current level is the
/// control polyline and the next its first refinement; at the cycle's last
/// level the next is the control polyline again, closing the cycle; in
/// between the next level refines the current one.
pub open spec fn fill_next(s: AnimState) -> AnimState {
    if s.next.len() == 0 {
        if s.step_idx == 0 {
            AnimState {
                original: s.original,
                current: s.original,
                next: refine_spec(s.original),
                progress: s.progress,
                step_idx: s.step_idx,
                max_steps: s.max_steps,
                speed: s.speed,
            }
        } else if s.step_idx == s.max_steps - 1 {
            AnimState {
                original: s.original,
                current: s.current,
                next: s.original,
                progress: s.progress,
                step_idx: s.step_idx,
                max_steps: s.max_steps,
                speed: s.speed,
            }
        } else {
            AnimState {
                original: s.original,
                current: s.current,
                next: refine_spec(s.current),
                progress: s.progress,
                step_idx: s.step_idx,
                max_steps: s.max_steps,
                speed: s.speed,
            }
        }
    } else {
        s
    }
}

/// One tick of the animator: with fewer than two control points nothing
/// moves; otherwise the clock advances and the next level is filled in
/// where it is missing.
pub open spec fn step_state(s: AnimState, delta: int) -> AnimState {
    if s.original.len() < 2 {
        s
    } else {
        fill_next(advance_state(s, delta))
    }
}

/// The frame a tick returns: with fewer than two control points, the
/// control points themselves, untouched; otherwise the blend of the new
/// state's current and next levels at the new progress, rendered behind
/// the control points.
pub open spec fn step_frame(s: AnimState, delta: int) -> Seq<Point> {
    if s.original.len() < 2 {
        s.original
    } else {
        let s2 = step_state(s, delta);
        visualization_spec(s2.original, interpolate_spec(s2.current, s2.next, s2.progress))
    }
}

/// A rendered frame: the control points first, tagged with the control
/// colour, then the animated points, tagged with the curve colour.
pub open spec fn visualization_spec(orig: Seq<Point>, pts: Seq<Point>) -> Seq<Point> {
    orig.map(|k: int, p: Point| Point { position: p.position, color: control_color() }) + pts.map(
        |k: int, p: Point| Point { position: p.position, color: curve_color() },
    )
}

/// An exact copy of a point list.
fn clone_points(v: &Vec<Point>) -> (r: Vec<Point>)
    ensures
        r@ == v@,
{
    let mut r: Vec<Point> = Vec::new();
    let mut i: usize = 0;
    while i < v.len()
        invariant
            i <= v.len(),
            r@ == v@.subrange(0, i as int),
        decreases v.len() - i,
    {
        r.push(v[i]);
        proof {
            assert(v@.subrange(0, i as int).push(v@[i as int]) =~= v@.subrange(0, i + 1));
        }
        i = i + 1;
    }
    proof {
        assert(v@.subrange(0, v@.len() as int) =~= v@);
    }
    r
}

/// The virtual position that the sparser list `sp` offers for the interior
/// dense index `i`, exactly as [`resample_pos`] describes.
fn resample_point(sp: &Vec<Point>, i: usize, dlen: usize) -> (r: Vec2)
    requires
        sp.len() >= 1,
        points_ok(sp@),
        1 <= i,
        i + 1 < dlen,
    ensures
        r == resample_pos(sp@, i as int, dlen as int),
        vec2_ok(r),
{
    let slen = sp.len();
    if slen == 1 {
        return sp[0].position;
    }
    let s1 = slen - 1;
    let d1 = dlen - 1;
    proof {
        assert(usize::MAX as int <= u64::MAX as int);
        vstd::arithmetic::mul::lemma_mul_upper_bound(
            i as int,
            u64::MAX as int,
            s1 as int,
            u64::MAX as int,
        );
        assert((i as int) * (s1 as int) < (d1 as int) * (s1 as int)) by (nonlinear_arith)
            requires
                (i as int) < (d1 as int),
                (s1 as int) >= 1,
        ;
        vstd::arithmetic::div_mod::lemma_multiply_divide_lt(
            (i as int) * (s1 as int),
            d1 as int,
            s1 as int,
        );
        vstd::arithmetic::div_mod::lemma_mod_division_less_than_divisor(
            (i as int) * (s1 as int),
            d1 as int,
        );
        vstd::arithmetic::div_mod::lemma_div_pos_is_pos((i as int) * (s1 as int), d1 as int);
    }
    let prod: u128 = (i as u128) * (s1 as u128);
    let j: usize = (prod / (d1 as u128)) as usize;
    let rem: u128 = prod % (d1 as u128);
    proof {
        vstd::arithmetic::div_mod::lemma_multiply_divide_lt(
            (rem as int) * (FIXED_ONE as int),
            d1 as int,
            FIXED_ONE as int,
        );
        vstd::arithmetic::div_mod::lemma_div_pos_is_pos((rem as int) * (FIXED_ONE as int), d1 as int);
    }
    let f: i64 = ((rem * (FIXED_ONE as u128)) / (d1 as u128)) as i64;
    lerp_position(sp[j].position, sp[j + 1].position, f)
}

/// Structural equality of two point lists, positions and tags alike.
fn eq_points(a: &Vec<Point>, b: &Vec<Point>) -> (r: bool)
    ensures
        r <==> a@ == b@,
{
    if a.len() != b.len() {
        return false;
    }
    let mut i: usize = 0;
    while i < a.len()
        invariant
            i <= a.len(),
            a@.len() == b@.len(),
            forall|k: int| 0 <= k < i ==> a@[k] == b@[k],
        decreases a.len() - i,
    {
        let p = a[i];
        let q = b[i];
        if p.position.x != q.position.x || p.position.y != q.position.y || p.color.0 != q.color.0
            || p.color.1 != q.color.1 || p.color.2 != q.color.2 {
            assert(a@[i as int] != b@[i as int]);
            return false;
        }
        assert(a@[i as int] == b@[i as int]);
        i = i + 1;
    }
    proof {
        assert(a@ =~= b@);
    }
    true
}

/// The animator.  The fields are public so that a host or a test can
/// inspect a state or build one directly; [`Chaikin::wf`] says which
/// states the methods accept.
pub struct Chaikin {
    /// The user's control polyline.
    pub original_points: Vec<Point>,
    /// The point sequence at the start of the active animation segment.
    pub current_points: Vec<Point>,
    /// The point sequence at the end of the active animation segment;
    /// empty when it has not been computed yet.
    pub next_points: Vec<Point>,
    /// Animation fraction within the active segment, in `[0, FIXED_ONE)`.
    pub animation_progress: i64,
    /// The current refinement level, in `0 .. max_steps`.
    pub current_step: usize,
    /// Length of the level cycle; always [`MAX_STEPS`].
    pub max_steps: usize,
    /// Fixed-point speed factor applied to every time increment.
    pub animation_speed: i64,
}

/// The mathematical value of an animator state.
#[verifier::ext_equal]
pub ghost struct AnimState {
    pub original: Seq<Point>,
    pub current: Seq<Point>,
    pub next: Seq<Point>,
    pub progress: int,
    pub step_idx: int,
    pub max_steps: int,
    pub speed: int,
}

impl View for Chaikin {
    type V = AnimState;

    open spec fn view(&self) -> AnimState {
        AnimState {
            original: self.original_points@,
            current: self.current_points@,
            next: self.next_points@,
            progress: self.animation_progress as int,
            step_idx: self.current_step as int,
            max_steps: self.max_steps as int,
            speed: self.animation_speed as int,
        }
    }
}

impl Chaikin {
    /// The states the animator's methods accept: coordinates within the
    /// limit, the progress fraction inside one segment, the level inside
    /// the cycle, and a bounded speed.
    pub open spec fn wf(&self) -> bool {
        &&& points_ok(self.original_points@)
        &&& points_ok(self.current_points@)
        &&& points_ok(self.next_points@)
        &&& 0 <= self.animation_progress < FIXED_ONE
        &&& self.max_steps == MAX_STEPS
        &&& self.current_step < MAX_STEPS
        &&& 0 <= self.animation_speed <= crate::fixed::SPEED_LIMIT
    }

    /// A fresh animator: the given points are both the control polyline
    /// and the current level, nothing is computed yet, and the cycle
    /// stands at its start.
    pub fn new(points: Vec<Point>) -> (c: Chaikin)
        ensures
            c@ == (AnimState {
                original: points@,
                current: points@,
                next: Seq::<Point>::empty(),
                progress: 0,
                step_idx: 0,
                max_steps: MAX_STEPS as int,
                speed: FIXED_ONE as int,
            }),
            points_ok(points@) ==> c.wf(),
    {
        let current = clone_points(&points);
        Chaikin {
            original_points: points,
            current_points: current,
            next_points: Vec::new(),
            animation_progress: 0,
            current_step: 0,
            max_steps: MAX_STEPS,
            animation_speed: FIXED_ONE,
        }
    }

    /// One corner-cutting pass over `points`, exactly as [`refine_spec`]
    /// describes: sequences shorter than two points come back unchanged;
    /// otherwise the endpoints are kept with their tags and every segment
    /// contributes its quarter point and its three-quarter point, tagged
    /// with the neutral colour.
    pub fn apply_chaikin(&self, points: &Vec<Point>) -> (r: Vec<Point>)
        requires
            points_ok(points@),
        ensures
            r@ == refine_spec(points@),
            points_ok(r@),
    {
        proof {
            lemma_refine_preserves_ok(points@);
        }
        if points.len() < 2 {
            return clone_points(points);
        }
        let n = points.len();
        let mut result: Vec<Point> = Vec::new();
        result.push(points[0]);
        let mut i: usize = 0;
        while i < n - 1
            invariant
                points_ok(points@),
                n == points@.len(),
                2 <= n,
                i <= n - 1,
                result@.len() == 1 + 2 * i,
                forall|k: int| 0 <= k < result@.len() ==> result@[k] == refine_at(points@, k),
            decreases n - i,
        {
            let p0 = points[i].position;
            let p1 = points[i + 1].position;
            let q = Point { position: lerp_position(p0, p1, QUARTER), color: (255, 255, 255) };
            let r = Point {
                position: lerp_position(p0, p1, THREE_QUARTERS),
                color: (255, 255, 255),
            };
            proof {
                assert((2 * i as int + 1 - 1) / 2 == i as int);
                assert((2 * i as int + 2 - 1) / 2 == i as int);
                assert(q == refine_at(points@, 2 * i as int + 1));
                assert(r == refine_at(points@, 2 * i as int + 2));
            }
            result.push(q);
            result.push(r);
            i = i + 1;
        }
        result.push(points[n - 1]);
        proof {
            assert(result@ =~= refine_spec(points@));
        }
        result
    }

    /// Blend the current level towards the next one at fraction
    /// `t / FIXED_ONE`, exactly as [`interpolate_spec`] describes.
    pub fn interpolate(&self, t: i64) -> (r: Vec<Point>)
        requires
            points_ok(self.current_points@),
            points_ok(self.next_points@),
            0 <= t <= FIXED_ONE,
        ensures
            r@ == interpolate_spec(self.current_points@, self.next_points@, t as int),
    {
        if self.current_points.len() == 0 {
            return clone_points(&self.next_points);
        }
        if self.next_points.len() == 0 {
            return clone_points(&self.current_points);
        }
        if self.current_points.len() != self.next_points.len() {
            return self.interpolate_different_point_counts(t);
        }
        let n = self.current_points.len();
        let mut result: Vec<Point> = Vec::new();
        let mut i: usize = 0;
        while i < n
            invariant
                n == self.current_points@.len(),
                n == self.next_points@.len(),
                points_ok(self.current_points@),
                points_ok(self.next_points@),
                0 <= t <= FIXED_ONE,
                i <= n,
                result@.len() == i,
                forall|k: int|
                    0 <= k < i ==> result@[k] == interp_equal_point(
                        self.current_points@,
                        self.next_points@,
                        t as int,
                        k,
                    ),
            decreases n - i,
        {
            let p = self.current_points[i];
            let q = self.next_points[i];
            result.push(
                Point {
                    position: lerp_position(p.position, q.position, t),
                    color: (255, 255, 255),
                },
            );
            i = i + 1;
        }
        proof {
            assert(result@ =~= interp_equal(self.current_points@, self.next_points@, t as int));
        }
        result
    }

    /// Blend the current level towards the next one when the two levels
    /// hold different numbers of points, exactly as [`interp_unequal`]
    /// describes: endpoints blend endpoint to endpoint, and each interior
    /// point of the denser side blends against the virtual position the
    /// sparser side offers for it.
    pub fn interpolate_different_point_counts(&self, t: i64) -> (r: Vec<Point>)
        requires
            self.current_points.len() >= 1,
            self.next_points.len() >= 1,
            points_ok(self.current_points@),
            points_ok(self.next_points@),
            0 <= t <= FIXED_ONE,
        ensures
            r@ == interp_unequal(self.current_points@, self.next_points@, t as int),
    {
        let curr_len = self.current_points.len();
        let next_len = self.next_points.len();
        let ghost cur = self.current_points@;
        let ghost nxt = self.next_points@;
        let mut result: Vec<Point> = Vec::new();
        result.push(
            Point {
                position: lerp_position(
                    self.current_points[0].position,
                    self.next_points[0].position,
                    t,
                ),
                color: (255, 255, 255),
            },
        );
        if curr_len > next_len {
            let mut i: usize = 1;
            while i < curr_len - 1
                invariant
                    cur == self.current_points@,
                    nxt == self.next_points@,
                    curr_len == cur.len(),
                    next_len == nxt.len(),
                    curr_len > next_len >= 1,
                    points_ok(cur),
                    points_ok(nxt),
                    0 <= t <= FIXED_ONE,
                    1 <= i <= curr_len - 1,
                    result@.len() == i,
                    forall|k: int|
                        0 <= k < i ==> result@[k] == unequal_point(cur, nxt, t as int, k),
                decreases curr_len - 1 - i,
            {
                let target = resample_point(&self.next_points, i, curr_len);
                let p = Point {
                    position: lerp_position(self.current_points[i].position, target, t),
                    color: (255, 255, 255),
                };
                result.push(p);
                i = i + 1;
            }
        } else {
            let mut i: usize = 1;
            while i < next_len - 1
                invariant
                    cur == self.current_points@,
                    nxt == self.next_points@,
                    curr_len == cur.len(),
                    next_len == nxt.len(),
                    1 <= curr_len <= next_len,
                    points_ok(cur),
                    points_ok(nxt),
                    0 <= t <= FIXED_ONE,
                    1 <= i,
                    next_len >= 2 ==> i <= next_len - 1,
                    next_len == 1 ==> i == 1,
                    result@.len() == i,
                    forall|k: int|
                        0 <= k < i ==> result@[k] == unequal_point(cur, nxt, t as int, k),
                decreases next_len - 1 - i,
            {
                let source = resample_point(&self.current_points, i, next_len);
                let p = Point {
                    position: lerp_position(source, self.next_points[i].position, t),
                    color: (255, 255, 255),
                };
                result.push(p);
                i = i + 1;
            }
        }
        result.push(
            Point {
                position: lerp_position(
                    self.current_points[curr_len - 1].position,
                    self.next_points[next_len - 1].position,
                    t,
                ),
                color: (255, 255, 255),
            },
        );
        proof {
            assert(result@ =~= interp_unequal(cur, nxt, t as int));
        }
        result
    }

    /// The rendered frame for a list of animated points: the control
    /// points first, tagged with the control colour, then the animated
    /// points, tagged with the curve colour, exactly as
    /// [`visualization_spec`] describes.
    pub fn create_visualization(&self, points: Vec<Point>) -> (r: Vec<Point>)
        ensures
            r@ == visualization_spec(self.original_points@, points@),
    {
        let n = self.original_points.len();
        let m = points.len();
        let mut result: Vec<Point> = Vec::new();
        let mut i: usize = 0;
        while i < n
            invariant
                n == self.original_points@.len(),
                i <= n,
                result@.len() == i,
                forall|k: int|
                    0 <= k < i ==> result@[k] == (Point {
                        position: self.original_points@[k].position,
                        color: control_color(),
                    }),
            decreases n - i,
        {
            let p = self.original_points[i];
            result.push(Point { position: p.position, color: (255, 0, 0) });
            i = i + 1;
        }
        let mut j: usize = 0;
        while j < m
            invariant
                n == self.original_points@.len(),
                m == points@.len(),
                j <= m,
                result@.len() == n + j,
                forall|k: int|
                    0 <= k < n ==> result@[k] == (Point {
                        position: self.original_points@[k].position,
                        color: control_color(),
                    }),
                forall|k: int|
                    0 <= k < j ==> result@[n + k] == (Point {
                        position: points@[k].position,
                        color: curve_color(),
                    }),
            decreases m - j,
        {
            let p = points[j];
            result.push(Point { position: p.position, color: (0, 255, 0) });
            j = j + 1;
        }
        proof {
            assert(result@ =~= visualization_spec(self.original_points@, points@));
        }
        result
    }

    /// Replace the control polyline.  Structurally identical points (tags
    /// included) leave the animator exactly as it was; any other list is a
    /// full reset: the new points become both the control polyline and the
    /// current level, the computed next level is dropped, and progress and
    /// level return to the start of the cycle.
    pub fn set_points(&mut self, points: Vec<Point>)
        requires
            points_ok(points@),
        ensures
            points@ == old(self).original_points@ ==> final(self)@ == old(self)@,
            points@ != old(self).original_points@ ==> final(self)@ == (AnimState {
                original: points@,
                current: points@,
                next: Seq::<Point>::empty(),
                progress: 0,
                step_idx: 0,
                max_steps: old(self)@.max_steps,
                speed: old(self)@.speed,
            }),
            old(self).wf() ==> final(self).wf(),
    {
        if !eq_points(&self.original_points, &points) {
            self.original_points = clone_points(&points);
            self.current_points = points;
            self.next_points = Vec::new();
            self.animation_progress = 0;
            self.current_step = 0;
        }
    }

    /// One animation tick, `delta` fixed-point seconds after the previous
    /// one.  The state moves exactly as [`step_state`] describes and the
    /// returned frame is exactly [`step_frame`]: the control points
    /// (tagged as such) followed by the blend of the current level towards
    /// the next at the new progress fraction.  With fewer than two control
    /// points the tick changes nothing and returns the control points
    /// unchanged.
    pub fn step(&mut self, delta: i64) -> (frame: Vec<Point>)
        requires
            old(self).wf(),
            0 <= delta <= crate::fixed::DELTA_LIMIT,
        ensures
            final(self)@ == step_state(old(self)@, delta as int),
            final(self).wf(),
            frame@ == step_frame(old(self)@, delta as int),
    {
        if self.original_points.len() < 2 {
            return clone_points(&self.original_points);
        }
        let inc = crate::fixed::fixed_scale(delta, self.animation_speed);
        self.animation_progress = self.animation_progress + inc;
        if self.animation_progress >= FIXED_ONE {
            self.animation_progress = 0;
            self.current_step = (self.current_step + 1) % self.max_steps;
            self.current_points = clone_points(&self.next_points);
            self.next_points = Vec::new();
        }
        proof {
            assert(self@ =~= advance_state(old(self)@, delta as int));
        }
        if self.next_points.len() == 0 {
            if self.current_step == 0 {
                self.current_points = clone_points(&self.original_points);
                let refined = self.apply_chaikin(&self.original_points);
                self.next_points = refined;
            } else if self.current_step == self.max_steps - 1 {
                self.next_points = clone_points(&self.original_points);
            } else {
                let refined = self.apply_chaikin(&self.current_points);
                self.next_points = refined;
            }
        }
        proof {
            assert(self@ =~= fill_next(advance_state(old(self)@, delta as int)));
        }
        let interpolated = self.interpolate(self.animation_progress);
        self.create_visualization(interpolated)
    }
}

} // verus!
