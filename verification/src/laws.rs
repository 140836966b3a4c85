//! The library's general laws, each stated over the spec functions that
//! the animator's contracts use and proved once and for all.

use crate::chaikin::{
    interpolate_spec, progress_increment, refine_spec, step_state, unequal_len, unequal_point,
    AnimState, MAX_STEPS,
};
use crate::fixed::{lemma_lerp_one, lemma_lerp_same, lemma_lerp_zero, FIXED_ONE};
use crate::point::{lerp_vec, Point, Vec2};
use vstd::arithmetic::div_mod::{
    lemma_add_mod_noop, lemma_add_mod_noop_right, lemma_mod_division_less_than_divisor,
    lemma_mod_self_0, lemma_small_mod,
};
use vstd::prelude::*;

verus! {

/// Blending a position with itself changes nothing, whatever the
/// fraction.
pub proof fn lemma_lerp_vec_same(a: Vec2, t: int)
    ensures
        lerp_vec(a, a, t) == a,
{
    lemma_lerp_same(a.x as int, t);
    lemma_lerp_same(a.y as int, t);
}

/// Fraction zero reproduces the first position exactly.
pub proof fn lemma_lerp_vec_zero(a: Vec2, b: Vec2)
    ensures
        lerp_vec(a, b, 0) == a,
{
    lemma_lerp_zero(a.x as int, b.x as int);
    lemma_lerp_zero(a.y as int, b.y as int);
}

/// Fraction one reproduces the second position exactly.
pub proof fn lemma_lerp_vec_one(a: Vec2, b: Vec2)
    ensures
        lerp_vec(a, b, FIXED_ONE as int) == b,
{
    lemma_lerp_one(a.x as int, b.x as int);
    lemma_lerp_one(a.y as int, b.y as int);
}

/// Refining a sequence of fewer than two points returns it unchanged.
pub proof fn lemma_refine_short_identity(s: Seq<Point>)
    requires
        s.len() < 2,
    ensures
        refine_spec(s) == s,
{
}

/// Refining `n >= 2` points yields `2 * (n - 1) + 2` points, and the
/// first and last of them are the input's first and last points, kept
/// exactly (positions and tags).
pub proof fn lemma_refine_len_and_endpoints(s: Seq<Point>)
    requires
        s.len() >= 2,
    ensures
        refine_spec(s).len() == 2 * (s.len() - 1) + 2,
        refine_spec(s)[0] == s[0],
        refine_spec(s)[refine_spec(s).len() - 1] == s[s.len() - 1],
{
}

/// Blending a sequence with itself moves no position, whatever the
/// fraction: the interpolation has the sequence as a fixed point.
pub proof fn lemma_interpolate_fixed_point(a: Seq<Point>, t: int)
    ensures
        interpolate_spec(a, a, t).len() == a.len(),
        forall|i: int|
            0 <= i < a.len() ==> #[trigger] interpolate_spec(a, a, t)[i].position
                == a[i].position,
{
    if a.len() > 0 {
        assert forall|i: int|
            0 <= i < a.len() implies #[trigger] interpolate_spec(a, a, t)[i].position
            == a[i].position by {
            lemma_lerp_vec_same(a[i].position, t);
        }
    }
}

/// Blending at fraction zero reproduces the first sequence's endpoint
/// positions exactly, and at fraction one the second's; with equal
/// lengths, every position is reproduced, not only the endpoints.
pub proof fn lemma_interpolate_endpoints(a: Seq<Point>, b: Seq<Point>)
    requires
        a.len() >= 1,
        b.len() >= 1,
    ensures
        interpolate_spec(a, b, 0)[0].position == a[0].position,
        interpolate_spec(a, b, 0).last().position == a.last().position,
        interpolate_spec(a, b, FIXED_ONE as int)[0].position == b[0].position,
        interpolate_spec(a, b, FIXED_ONE as int).last().position == b.last().position,
        a.len() == b.len() ==> forall|i: int|
            0 <= i < a.len() ==> #[trigger] interpolate_spec(a, b, 0)[i].position
                == a[i].position,
        a.len() == b.len() ==> forall|i: int|
            0 <= i < a.len() ==> #[trigger] interpolate_spec(a, b, FIXED_ONE as int)[i].position
                == b[i].position,
        a.len() > b.len() ==> forall|i: int|
            0 <= i < a.len() ==> #[trigger] interpolate_spec(a, b, 0)[i].position
                == a[i].position,
        b.len() > a.len() ==> forall|i: int|
            0 <= i < b.len() ==> #[trigger] interpolate_spec(a, b, FIXED_ONE as int)[i].position
                == b[i].position,
{
    if a.len() > b.len() {
        assert forall|i: int|
            0 <= i < a.len() implies #[trigger] interpolate_spec(a, b, 0)[i].position
            == a[i].position by {
            let len = unequal_len(a, b);
            if i == 0 {
                lemma_lerp_vec_zero(a[0].position, b[0].position);
            } else if i == len - 1 {
                lemma_lerp_vec_zero(a[a.len() - 1].position, b[b.len() - 1].position);
            } else {
                lemma_lerp_vec_zero(
                    a[i].position,
                    crate::chaikin::resample_pos(b, i, a.len() as int),
                );
            }
        }
    }
    if b.len() > a.len() {
        assert forall|i: int|
            0 <= i < b.len() implies #[trigger] interpolate_spec(
            a,
            b,
            FIXED_ONE as int,
        )[i].position == b[i].position by {
            let len = unequal_len(a, b);
            if i == 0 {
                lemma_lerp_vec_one(a[0].position, b[0].position);
            } else if i == len - 1 {
                lemma_lerp_vec_one(a[a.len() - 1].position, b[b.len() - 1].position);
            } else {
                lemma_lerp_vec_one(
                    crate::chaikin::resample_pos(a, i, b.len() as int),
                    b[i].position,
                );
            }
        }
    }
    if a.len() == b.len() {
        assert forall|i: int|
            0 <= i < a.len() implies #[trigger] interpolate_spec(a, b, 0)[i].position
            == a[i].position by {
            lemma_lerp_vec_zero(a[i].position, b[i].position);
        }
        assert forall|i: int|
            0 <= i < a.len() implies #[trigger] interpolate_spec(
            a,
            b,
            FIXED_ONE as int,
        )[i].position == b[i].position by {
            lemma_lerp_vec_one(a[i].position, b[i].position);
        }
    } else {
        let len = unequal_len(a, b);
        assert(len >= 2);
        assert(interpolate_spec(a, b, 0)[0] == unequal_point(a, b, 0, 0));
        assert(interpolate_spec(a, b, 0).last() == unequal_point(a, b, 0, len - 1));
        lemma_lerp_vec_zero(a[0].position, b[0].position);
        lemma_lerp_vec_zero(a.last().position, b.last().position);
        lemma_lerp_vec_one(a[0].position, b[0].position);
        lemma_lerp_vec_one(a.last().position, b.last().position);
    }
}

/// The level the cycle shows after `k` refinements of the control
/// polyline.
pub open spec fn iter_refine(s: Seq<Point>, k: int) -> Seq<Point>
    decreases k,
{
    if k <= 0 {
        s
    } else {
        refine_spec(iter_refine(s, k - 1))
    }
}

/// Refinement never shortens a polyline of at least two points.
pub proof fn lemma_iter_refine_len(s: Seq<Point>, k: int)
    requires
        s.len() >= 2,
    ensures
        iter_refine(s, k).len() >= 2,
    decreases k,
{
    if k > 0 {
        lemma_iter_refine_len(s, k - 1);
    }
}

/// The level that stands in the animator's next buffer while it shows
/// level `k`: the following refinement, or the control polyline itself at
/// the cycle's last level.
pub open spec fn expected_next(orig: Seq<Point>, k: int) -> Seq<Point> {
    if k == MAX_STEPS - 1 {
        orig
    } else {
        iter_refine(orig, k + 1)
    }
}

/// A running animator state that a tick has already passed through: both
/// buffers agree with the refinement cycle of its control polyline.
pub open spec fn synced(orig: Seq<Point>, speed: int, s: AnimState) -> bool {
    &&& orig.len() >= 2
    &&& s.original == orig
    &&& s.speed == speed
    &&& s.max_steps == MAX_STEPS
    &&& 0 <= s.progress < FIXED_ONE
    &&& 0 <= s.step_idx < MAX_STEPS
    &&& s.current == iter_refine(orig, s.step_idx)
    &&& s.next == expected_next(orig, s.step_idx)
}

/// Whether a tick of `delta` crosses the level boundary.
pub open spec fn crosses(s: AnimState, delta: int) -> bool {
    s.progress + progress_increment(s, delta) >= FIXED_ONE
}

/// One tick keeps a running state in step with the refinement cycle; the
/// level index advances cyclically exactly when the tick crosses the
/// boundary.
pub proof fn lemma_step_synced(orig: Seq<Point>, speed: int, s: AnimState, delta: int)
    requires
        synced(orig, speed, s),
        0 <= progress_increment(s, delta) < FIXED_ONE,
    ensures
        synced(orig, speed, step_state(s, delta)),
        step_state(s, delta).step_idx == if crosses(s, delta) {
            (s.step_idx + 1) % (MAX_STEPS as int)
        } else {
            s.step_idx
        },
{
    let k = s.step_idx;
    lemma_iter_refine_len(orig, k);
    lemma_iter_refine_len(orig, k + 1);
    if crosses(s, delta) {
        let k2 = (k + 1) % (MAX_STEPS as int);
        if k + 1 < MAX_STEPS {
            lemma_small_mod((k + 1) as nat, MAX_STEPS as nat);
        } else {
            lemma_mod_self_0(MAX_STEPS as int);
        }
        lemma_iter_refine_len(orig, k2);
        assert(iter_refine(orig, k2 + 1) == refine_spec(iter_refine(orig, k2)));
    } else {
        lemma_iter_refine_len(orig, k + 1);
    }
}

/// The state after a whole list of ticks.
pub open spec fn run_steps(s: AnimState, deltas: Seq<int>) -> AnimState
    decreases deltas.len(),
{
    if deltas.len() == 0 {
        s
    } else {
        run_steps(step_state(s, deltas[0]), deltas.drop_first())
    }
}

/// How many of the ticks in the list cross a level boundary.
pub open spec fn count_crossings(s: AnimState, deltas: Seq<int>) -> int
    decreases deltas.len(),
{
    if deltas.len() == 0 {
        0
    } else {
        (if crosses(s, deltas[0]) {
            1int
        } else {
            0int
        }) + count_crossings(step_state(s, deltas[0]), deltas.drop_first())
    }
}

/// Ticks keep a running state in step with the refinement cycle, and the
/// level index they leave behind is the starting one advanced by the
/// number of boundary crossings, modulo the cycle length.
pub proof fn lemma_run_synced(orig: Seq<Point>, speed: int, s: AnimState, deltas: Seq<int>)
    requires
        synced(orig, speed, s),
        forall|i: int|
            0 <= i < deltas.len() ==> 0 <= (#[trigger] deltas[i]) * speed / (FIXED_ONE as int)
                < FIXED_ONE,
    ensures
        synced(orig, speed, run_steps(s, deltas)),
        run_steps(s, deltas).step_idx == (s.step_idx + count_crossings(s, deltas)) % (
        MAX_STEPS as int),
    decreases deltas.len(),
{
    let m = MAX_STEPS as int;
    if deltas.len() == 0 {
        lemma_small_mod(s.step_idx as nat, MAX_STEPS as nat);
    } else {
        let d0 = deltas[0];
        assert(0 <= d0 * speed / (FIXED_ONE as int) < FIXED_ONE);
        lemma_step_synced(orig, speed, s, d0);
        let s1 = step_state(s, d0);
        let rest = deltas.drop_first();
        assert(forall|i: int|
            0 <= i < rest.len() ==> 0 <= (#[trigger] rest[i]) * speed / (FIXED_ONE as int)
                < FIXED_ONE) by {
            assert(forall|i: int| 0 <= i < rest.len() ==> rest[i] == deltas[i + 1]);
        }
        lemma_run_synced(orig, speed, s1, rest);
        let c1: int = if crosses(s, d0) {
            1
        } else {
            0
        };
        let cr = count_crossings(s1, rest);
        assert(run_steps(s, deltas).step_idx == (s1.step_idx + cr) % m);
        if crosses(s, d0) {
            assert(s1.step_idx == (s.step_idx + 1) % m);
            lemma_add_mod_noop_right((s.step_idx + 1) % m, cr, m);
            assert(((s.step_idx + 1) % m + cr % m) % m == ((s.step_idx + 1) % m + cr) % m);
            lemma_add_mod_noop(s.step_idx + 1, cr, m);
            assert(((s.step_idx + 1) % m + cr % m) % m == (s.step_idx + 1 + cr) % m);
        } else {
            assert(s1.step_idx == s.step_idx);
        }
        assert(count_crossings(s, deltas) == c1 + cr);
    }
}

/// The weaker invariant behind the cycling law, with no bound on how far
/// a single tick may jump: the level index counts boundary crossings
/// modulo the cycle length, and whenever the cycle stands at its start
/// the current level is the control polyline (with its first refinement,
/// or nothing yet, in the next buffer).
pub open spec fn tracks_cycle(orig: Seq<Point>, speed: int, c: int, s: AnimState) -> bool {
    &&& orig.len() >= 2
    &&& s.original == orig
    &&& s.speed == speed
    &&& s.max_steps == MAX_STEPS
    &&& 0 <= s.progress < FIXED_ONE
    &&& s.step_idx == c % (MAX_STEPS as int)
    &&& s.step_idx == 0 ==> s.current == orig && (s.next == refine_spec(orig) || s.next
        == Seq::<Point>::empty())
}

/// One tick with a nonnegative increment keeps [`tracks_cycle`], counting
/// the tick when it crosses a boundary.
pub proof fn lemma_step_tracks_cycle(
    orig: Seq<Point>,
    speed: int,
    c: int,
    s: AnimState,
    delta: int,
)
    requires
        tracks_cycle(orig, speed, c, s),
        progress_increment(s, delta) >= 0,
    ensures
        tracks_cycle(orig, speed, if crosses(s, delta) {
            c + 1
        } else {
            c
        }, step_state(s, delta)),
{
    let m = MAX_STEPS as int;
    lemma_mod_division_less_than_divisor(c, m);
    if crosses(s, delta) {
        lemma_small_mod(1nat, MAX_STEPS as nat);
        lemma_add_mod_noop(c, 1, m);
        if c % m + 1 < m {
            lemma_small_mod((c % m + 1) as nat, MAX_STEPS as nat);
        } else {
            lemma_mod_self_0(m);
        }
        assert((s.step_idx + 1) % m == (c + 1) % m);
    }
}

/// Any run of ticks with nonnegative increments keeps [`tracks_cycle`],
/// counting its boundary crossings.
pub proof fn lemma_run_tracks_cycle(
    orig: Seq<Point>,
    speed: int,
    c: int,
    s: AnimState,
    deltas: Seq<int>,
)
    requires
        tracks_cycle(orig, speed, c, s),
        forall|i: int|
            0 <= i < deltas.len() ==> (#[trigger] deltas[i]) * speed / (FIXED_ONE as int) >= 0,
    ensures
        tracks_cycle(orig, speed, c + count_crossings(s, deltas), run_steps(s, deltas)),
    decreases deltas.len(),
{
    if deltas.len() > 0 {
        let d0 = deltas[0];
        assert(d0 * speed / (FIXED_ONE as int) >= 0);
        lemma_step_tracks_cycle(orig, speed, c, s, d0);
        let s1 = step_state(s, d0);
        let c1: int = if crosses(s, d0) {
            c + 1
        } else {
            c
        };
        let rest = deltas.drop_first();
        assert(forall|i: int|
            0 <= i < rest.len() ==> (#[trigger] rest[i]) * speed / (FIXED_ONE as int) >= 0) by {
            assert(forall|i: int| 0 <= i < rest.len() ==> rest[i] == deltas[i + 1]);
        }
        lemma_run_tracks_cycle(orig, speed, c1, s1, rest);
    }
}

/// The cycling law: start an animator afresh on at least two control
/// points, tick it any number of times without touching the points
/// (ticks of any nonnegative length), and let exactly one full cycle of
/// level boundaries pass.  The current level is then the control
/// polyline again, and the cycle stands at its start.
pub proof fn lemma_cycle(s: AnimState, deltas: Seq<int>)
    requires
        s.original.len() >= 2,
        s.step_idx == 0,
        s.progress == 0,
        s.current == s.original,
        s.next == Seq::<Point>::empty(),
        s.max_steps == MAX_STEPS,
        forall|i: int|
            0 <= i < deltas.len() ==> (#[trigger] deltas[i]) * s.speed / (FIXED_ONE as int) >= 0,
        count_crossings(s, deltas) == MAX_STEPS,
    ensures
        run_steps(s, deltas).current == s.original,
        run_steps(s, deltas).step_idx == 0,
{
    let orig = s.original;
    let speed = s.speed;
    let m = MAX_STEPS as int;
    assert(tracks_cycle(orig, speed, 0, s)) by {
        lemma_small_mod(0nat, MAX_STEPS as nat);
    }
    lemma_run_tracks_cycle(orig, speed, 0, s, deltas);
    lemma_mod_self_0(m);
    assert(run_steps(s, deltas).step_idx == (MAX_STEPS as int) % m);
}

} // verus!

