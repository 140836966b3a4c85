//! The verified state machine behind the interactive editor.
//!
//! The host polls the window once per frame and hands the result in as an
//! [`InputSnapshot`] of plain values; [`InputHandler::handle_input`] then
//! decides everything: adding, grabbing and dragging points, starting the
//! animation, clearing the drawing, prompting when animation is requested
//! without points, and closing.

use crate::fixed::coord_ok;
use vstd::pervasive::VecAdditionalExecFns;
use vstd::prelude::*;
use vstd::string::StringExecFns;

verus! {

/// Squared fixed-point distance threshold within which a press grabs an
/// existing point: 20 whole units.
pub const NEAR_THRESHOLD: i64 = 20 * 65536;

/// Number of frames a recognized key press stays muted.
pub const KEY_COOLDOWN_FRAMES: u32 = 20;

/// The prompt shown when animation is requested without any points.
pub open spec fn empty_points_prompt() -> Seq<char> {
    "Please draw control points first!\nPress Enter to continue"@
}

/// What the host polled from the window this frame, as plain values.
#[derive(Clone, Copy)]
pub struct InputSnapshot {
    /// Pointer position, if the window reported one.
    pub mouse_pos: Option<(i64, i64)>,
    /// Left button held down.
    pub mouse_down: bool,
    /// The close key is held down.
    pub escape_down: bool,
    /// The start key is held down.
    pub enter_down: bool,
    /// The clear key is held down.
    pub space_down: bool,
}

/// Every position of the list lies within the coordinate limit.
pub open spec fn points_coords_ok(ps: Seq<(i64, i64)>) -> bool {
    forall|i: int|
        #![trigger ps[i]]
        0 <= i < ps.len() ==> coord_ok(ps[i].0 as int) && coord_ok(ps[i].1 as int)
}

/// Squared distance between two positions.
pub open spec fn dist_sq(p: (i64, i64), m: (i64, i64)) -> int {
    (p.0 - m.0) * (p.0 - m.0) + (p.1 - m.1) * (p.1 - m.1)
}

/// The grab threshold, squared.
pub open spec fn near_threshold_sq() -> int {
    (NEAR_THRESHOLD as int) * (NEAR_THRESHOLD as int)
}

/// The scan that picks the point a press grabs: walk the list once,
/// keeping the first index whose distance to `m` is strictly smaller than
/// every earlier candidate's and below the threshold.  `best` carries the
/// scan's state from position `k` on.
pub open spec fn scan_nearest(
    points: Seq<(i64, i64)>,
    m: (i64, i64),
    k: int,
    best: Option<int>,
) -> Option<int>
    decreases points.len() - k,
{
    if k < 0 || k >= points.len() {
        best
    } else {
        let d = dist_sq(points[k], m);
        let better = match best {
            Option::None => d < near_threshold_sq(),
            Option::Some(b) => d < dist_sq(points[b], m) && d < near_threshold_sq(),
        };
        scan_nearest(points, m, k + 1, if better {
            Option::Some(k)
        } else {
            best
        })
    }
}

/// The index of the point a press at `m` grabs, if any: the first point
/// at minimal distance, provided that distance is below the threshold.
pub open spec fn nearest_point_spec(points: Seq<(i64, i64)>, m: (i64, i64)) -> Option<int> {
    scan_nearest(points, m, 0, Option::None)
}

/// What it means for index `i` to be the grabbed point: within the
/// threshold, strictly nearer than every earlier point, and at least as
/// near as every later one.
pub open spec fn is_first_nearest(points: Seq<(i64, i64)>, m: (i64, i64), i: int) -> bool {
    &&& 0 <= i < points.len()
    &&& dist_sq(points[i], m) < near_threshold_sq()
    &&& forall|j: int| 0 <= j < i ==> dist_sq(#[trigger] points[j], m) > dist_sq(points[i], m)
    &&& forall|j: int|
        i < j < points.len() ==> dist_sq(#[trigger] points[j], m) >= dist_sq(points[i], m)
}

/// The invariant the scan carries from position `k` on, and what it
/// yields at the end.
proof fn lemma_scan_nearest_first(
    points: Seq<(i64, i64)>,
    m: (i64, i64),
    k: int,
    best: Option<int>,
)
    requires
        0 <= k <= points.len(),
        match best {
            Option::None => forall|j: int|
                0 <= j < k ==> dist_sq(#[trigger] points[j], m) >= near_threshold_sq(),
            Option::Some(b) => {
                &&& 0 <= b < k
                &&& dist_sq(points[b], m) < near_threshold_sq()
                &&& forall|j: int|
                    0 <= j < b ==> dist_sq(#[trigger] points[j], m) > dist_sq(points[b], m)
                &&& forall|j: int|
                    b < j < k ==> dist_sq(#[trigger] points[j], m) >= dist_sq(points[b], m)
            },
        },
    ensures
        match scan_nearest(points, m, k, best) {
            Option::None => forall|j: int|
                0 <= j < points.len() ==> dist_sq(#[trigger] points[j], m)
                    >= near_threshold_sq(),
            Option::Some(i) => is_first_nearest(points, m, i),
        },
    decreases points.len() - k,
{
    if k < points.len() {
        let d = dist_sq(points[k], m);
        let better = match best {
            Option::None => d < near_threshold_sq(),
            Option::Some(b) => d < dist_sq(points[b], m) && d < near_threshold_sq(),
        };
        let next = if better {
            Option::Some(k)
        } else {
            best
        };
        lemma_scan_nearest_first(points, m, k + 1, next);
    }
}

/// The grab rule, stated directly: the scan picks an index exactly when
/// some point lies within the threshold, and then it picks the first
/// index of minimal squared distance — strictly nearer than everything
/// before it, at least as near as everything after it.
pub proof fn lemma_nearest_point_first(points: Seq<(i64, i64)>, m: (i64, i64))
    ensures
        match nearest_point_spec(points, m) {
            Option::None => forall|j: int|
                0 <= j < points.len() ==> dist_sq(#[trigger] points[j], m)
                    >= near_threshold_sq(),
            Option::Some(i) => is_first_nearest(points, m, i),
        },
{
    lemma_scan_nearest_first(points, m, 0, Option::None);
}

/// The interactive editor's state.  The fields are public so that a host
/// or a test can inspect a state or build one directly;
/// [`InputHandler::wf`] says which states the methods accept.
pub struct InputHandler {
    /// The control points drawn so far.
    pub points: Vec<(i64, i64)>,
    /// Left button held down, as of the last frame.
    pub mouse_down: bool,
    /// Pointer position, as of the last frame that reported one.
    pub mouse_pos: (i64, i64),
    /// The animation has been started.
    pub is_animating: bool,
    /// The close key has been pressed.
    pub should_close: bool,
    /// Index of the point being dragged, while the button stays down.
    pub dragging_point: Option<usize>,
    /// The prompt currently shown, if any.
    pub message: Option<String>,
    /// Frames left before the next key press is recognized.
    pub key_cooldown: u32,
}

/// The mathematical value of an editor state.
#[verifier::ext_equal]
pub ghost struct InputState {
    pub points: Seq<(i64, i64)>,
    pub mouse_down: bool,
    pub mouse_pos: (i64, i64),
    pub is_animating: bool,
    pub should_close: bool,
    pub dragging_point: Option<int>,
    pub message: Option<Seq<char>>,
    pub key_cooldown: int,
}

impl View for InputHandler {
    type V = InputState;

    open spec fn view(&self) -> InputState {
        InputState {
            points: self.points@,
            mouse_down: self.mouse_down,
            mouse_pos: self.mouse_pos,
            is_animating: self.is_animating,
            should_close: self.should_close,
            dragging_point: match self.dragging_point {
                Option::Some(i) => Option::Some(i as int),
                Option::None => Option::None,
            },
            message: match self.message {
                Option::Some(m) => Option::Some(m@),
                Option::None => Option::None,
            },
            key_cooldown: self.key_cooldown as int,
        }
    }
}

/// First stage of a frame: sample the pointer position (when the window
/// reported one), record the button, and let the key cooldown tick down.
pub open spec fn sample_pointer(s: InputState, ev: InputSnapshot) -> InputState {
    InputState {
        mouse_pos: match ev.mouse_pos {
            Option::Some(p) => p,
            Option::None => s.mouse_pos,
        },
        mouse_down: ev.mouse_down,
        key_cooldown: if s.key_cooldown > 0 {
            s.key_cooldown - 1
        } else {
            s.key_cooldown
        },
        ..s
    }
}

/// Second stage: the keys.  The close key always registers; the start and
/// clear keys only outside the cooldown.  Starting without points raises
/// the prompt instead; the clear key drops all points and stops the
/// animation.
pub open spec fn apply_keys(s: InputState, ev: InputSnapshot) -> InputState {
    if ev.escape_down {
        InputState { should_close: true, ..s }
    } else if ev.enter_down && s.key_cooldown == 0 {
        if s.points.len() == 0 {
            InputState {
                message: Option::Some(empty_points_prompt()),
                key_cooldown: KEY_COOLDOWN_FRAMES as int,
                ..s
            }
        } else if !s.is_animating {
            InputState {
                is_animating: true,
                key_cooldown: KEY_COOLDOWN_FRAMES as int,
                ..s
            }
        } else {
            InputState { key_cooldown: KEY_COOLDOWN_FRAMES as int, ..s }
        }
    } else if ev.space_down && s.key_cooldown == 0 {
        InputState {
            points: Seq::<(i64, i64)>::empty(),
            is_animating: false,
            key_cooldown: KEY_COOLDOWN_FRAMES as int,
            ..s
        }
    } else {
        s
    }
}

/// Third stage: the pointer.  While the button is down, a point already
/// grabbed follows the pointer; a fresh press on a nearby point grabs it;
/// a fresh press elsewhere adds a point, unless the animation runs.
/// Releasing the button drops the grab.  `was_down` is the button state
/// of the previous frame.
pub open spec fn apply_mouse(s: InputState, was_down: bool) -> InputState {
    if s.mouse_down {
        match s.dragging_point {
            Option::Some(idx) => InputState {
                points: s.points.update(idx, s.mouse_pos),
                ..s
            },
            Option::None => {
                if was_down {
                    match nearest_point_spec(s.points, s.mouse_pos) {
                        Option::Some(idx) => InputState {
                            dragging_point: Option::Some(idx),
                            points: s.points.update(idx, s.mouse_pos),
                            ..s
                        },
                        Option::None => s,
                    }
                } else if !s.is_animating {
                    InputState { points: s.points.push(s.mouse_pos), ..s }
                } else {
                    s
                }
            },
        }
    } else {
        InputState { dragging_point: Option::None, ..s }
    }
}

/// Fourth stage: outside the cooldown, the start key also dismisses a
/// prompt that is showing.
pub open spec fn clear_prompt(s: InputState, ev: InputSnapshot) -> InputState {
    if ev.enter_down && s.message is Some && s.key_cooldown == 0 {
        InputState {
            message: Option::None,
            key_cooldown: KEY_COOLDOWN_FRAMES as int,
            ..s
        }
    } else {
        s
    }
}

/// One frame of the editor: the four stages in order.
pub open spec fn input_step(s: InputState, ev: InputSnapshot) -> InputState {
    let s1 = sample_pointer(s, ev);
    let s2 = apply_keys(s1, ev);
    let s3 = apply_mouse(s2, s.mouse_down);
    clear_prompt(s3, ev)
}

/// The one input combination on which the frame would have to follow a
/// grabbed point into a list that the clear key just emptied; the editor
/// does not accept it.
pub open spec fn clears_grabbed_point(s: InputState, ev: InputSnapshot) -> bool {
    let s1 = sample_pointer(s, ev);
    &&& ev.mouse_down
    &&& s.dragging_point is Some
    &&& !ev.escape_down
    &&& !ev.enter_down
    &&& ev.space_down
    &&& s1.key_cooldown == 0
}

impl InputHandler {
    /// The states the editor's methods accept: coordinates within the
    /// limit, and a grabbed index that lies within the point list.
    pub open spec fn wf(&self) -> bool {
        &&& points_coords_ok(self.points@)
        &&& coord_ok(self.mouse_pos.0 as int)
        &&& coord_ok(self.mouse_pos.1 as int)
        &&& match self.dragging_point {
            Option::Some(i) => i < self.points@.len(),
            Option::None => true,
        }
    }

    /// A fresh editor: no points, nothing pressed, nothing shown.
    pub fn new() -> (h: InputHandler)
        ensures
            h@ == (InputState {
                points: Seq::<(i64, i64)>::empty(),
                mouse_down: false,
                mouse_pos: (0, 0),
                is_animating: false,
                should_close: false,
                dragging_point: Option::None,
                message: Option::None,
                key_cooldown: 0,
            }),
            h.wf(),
    {
        InputHandler {
            points: Vec::new(),
            mouse_down: false,
            mouse_pos: (0, 0),
            is_animating: false,
            should_close: false,
            dragging_point: Option::None,
            message: Option::None,
            key_cooldown: 0,
        }
    }

    /// The index of the point a press at the current pointer position
    /// would grab, exactly as [`nearest_point_spec`] describes: the first
    /// point at minimal distance, if it lies within the grab threshold.
    pub fn find_nearest_point(&self) -> (r: Option<usize>)
        requires
            self.wf(),
        ensures
            match r {
                Option::Some(i) => nearest_point_spec(self.points@, self.mouse_pos)
                    == Option::Some(i as int) && i < self.points@.len(),
                Option::None => nearest_point_spec(self.points@, self.mouse_pos) is None,
            },
    {
        let mut best: Option<usize> = Option::None;
        let mut k: usize = 0;
        while k < self.points.len()
            invariant
                self.wf(),
                k <= self.points@.len(),
                match best {
                    Option::Some(b) => b < k,
                    Option::None => true,
                },
                scan_nearest(self.points@, self.mouse_pos, k as int, match best {
                    Option::Some(b) => Option::Some(b as int),
                    Option::None => Option::None,
                }) == nearest_point_spec(self.points@, self.mouse_pos),
            decreases self.points@.len() - k,
        {
            let p = self.points[k];
            let d = dist_sq_exec(p, self.mouse_pos);
            let better = match best {
                Option::None => d < threshold_sq_exec(),
                Option::Some(b) => {
                    let db = dist_sq_exec(self.points[b], self.mouse_pos);
                    d < db && d < threshold_sq_exec()
                },
            };
            if better {
                best = Option::Some(k);
            }
            k = k + 1;
        }
        best
    }

    /// One frame: take what the host polled and move the editor exactly
    /// as [`input_step`] describes.
    pub fn handle_input(&mut self, ev: InputSnapshot)
        requires
            old(self).wf(),
            ev.mouse_pos matches Some(p) ==> coord_ok(p.0 as int) && coord_ok(p.1 as int),
            !clears_grabbed_point(old(self)@, ev),
        ensures
            final(self)@ == input_step(old(self)@, ev),
            final(self).wf(),
    {
        let ghost s0 = self@;
        if let Option::Some(p) = ev.mouse_pos {
            self.mouse_pos = p;
        }
        let was_mouse_down = self.mouse_down;
        self.mouse_down = ev.mouse_down;
        if self.key_cooldown > 0 {
            self.key_cooldown = self.key_cooldown - 1;
        }
        proof {
            assert(self@ =~= sample_pointer(s0, ev));
        }
        let ghost s1 = self@;
        if ev.escape_down {
            self.should_close = true;
        } else if ev.enter_down && self.key_cooldown == 0 {
            if self.points.len() == 0 {
                self.message = Option::Some(
                    String::from_str("Please draw control points first!\nPress Enter to continue"),
                );
            } else if !self.is_animating {
                self.is_animating = true;
            }
            self.key_cooldown = KEY_COOLDOWN_FRAMES;
        } else if ev.space_down && self.key_cooldown == 0 {
            self.points = Vec::new();
            self.is_animating = false;
            self.key_cooldown = KEY_COOLDOWN_FRAMES;
        }
        proof {
            assert(self@ =~= apply_keys(s1, ev));
        }
        let ghost s2 = self@;
        proof {
            assert(coord_ok(self.mouse_pos.0 as int) && coord_ok(self.mouse_pos.1 as int));
            assert(points_coords_ok(s2.points)) by {
                if s2.points.len() != 0 {
                    assert(s2.points == old(self).points@);
                }
            }
        }
        if self.mouse_down {
            let drag = self.dragging_point;
            match drag {
                Option::Some(idx) => {
                    proof {
                        if idx >= self.points.len() {
                            assert(s2.points.len() == 0);
                            assert(clears_grabbed_point(s0, ev));
                            assert(false);
                        }
                    }
                    self.points.set(idx, self.mouse_pos);
                },
                Option::None => {
                    if was_mouse_down {
                        proof {
                            assert(self.wf());
                        }
                        let found = self.find_nearest_point();
                        if let Option::Some(idx) = found {
                            self.dragging_point = Option::Some(idx);
                            self.points.set(idx, self.mouse_pos);
                        }
                    } else if !self.is_animating {
                        let pos = self.mouse_pos;
                        self.points.push(pos);
                    }
                },
            }
        } else {
            self.dragging_point = Option::None;
        }
        proof {
            assert(self@ =~= apply_mouse(s2, s0.mouse_down));
        }
        let ghost s3 = self@;
        if ev.enter_down && self.message.is_some() && self.key_cooldown == 0 {
            self.message = Option::None;
            self.key_cooldown = KEY_COOLDOWN_FRAMES;
        }
        proof {
            assert(self@ =~= clear_prompt(s3, ev));
            assert(points_coords_ok(self.points@)) by {
                assert forall|i: int|
                    #![trigger self.points@[i]]
                    0 <= i < self.points@.len() implies coord_ok(self.points@[i].0 as int)
                    && coord_ok(self.points@[i].1 as int) by {
                    if self.points@[i] != s2.mouse_pos {
                        assert(self.points@[i] == s2.points[i]);
                    }
                }
            }
            assert(self.wf());
        }
    }

    /// Append a control point.
    pub fn add_point(&mut self, x: i64, y: i64)
        ensures
            final(self)@ == (InputState { points: old(self)@.points.push((x, y)), ..old(self)@ }),
    {
        self.points.push((x, y));
        proof {
            assert(self@ =~= (InputState { points: old(self)@.points.push((x, y)), ..old(self)@ }));
        }
    }

    /// The control points drawn so far.
    pub fn points(&self) -> (r: &Vec<(i64, i64)>)
        ensures
            r@ == self.points@,
    {
        &self.points
    }

    /// Whether the animation has been started.
    pub fn is_animating(&self) -> (r: bool)
        ensures
            r == self.is_animating,
    {
        self.is_animating
    }

    /// Whether the close key has been pressed.
    pub fn should_close(&self) -> (r: bool)
        ensures
            r == self.should_close,
    {
        self.should_close
    }

    /// The index of the point being dragged, if any.
    pub fn dragging_point(&self) -> (r: Option<usize>)
        ensures
            r == self.dragging_point,
    {
        self.dragging_point
    }

    /// The prompt currently shown, if any.
    pub fn message(&self) -> (r: Option<&str>)
        ensures
            match self.message {
                Option::Some(m) => r matches Some(t) && t@ == m@,
                Option::None => r is None,
            },
    {
        match &self.message {
            Option::Some(m) => Option::Some(m.as_str()),
            Option::None => Option::None,
        }
    }

    /// Dismiss the prompt.
    pub fn clear_message(&mut self)
        ensures
            final(self)@ == (InputState { message: Option::None, ..old(self)@ }),
    {
        self.message = Option::None;
        proof {
            assert(self@ =~= (InputState { message: Option::None, ..old(self)@ }));
        }
    }
}

/// Squared distance between two positions, exactly as [`dist_sq`]
/// describes.
fn dist_sq_exec(p: (i64, i64), m: (i64, i64)) -> (r: i128)
    requires
        coord_ok(p.0 as int),
        coord_ok(p.1 as int),
        coord_ok(m.0 as int),
        coord_ok(m.1 as int),
    ensures
        r == dist_sq(p, m),
{
    let dx = p.0 - m.0;
    let dy = p.1 - m.1;
    proof {
        assert(0 <= (dx as int) * (dx as int) <= 0x2000_0000_0000 * 0x2000_0000_0000)
            by (nonlinear_arith)
            requires
                -0x2000_0000_0000 <= dx as int <= 0x2000_0000_0000,
        ;
        assert(0 <= (dy as int) * (dy as int) <= 0x2000_0000_0000 * 0x2000_0000_0000)
            by (nonlinear_arith)
            requires
                -0x2000_0000_0000 <= dy as int <= 0x2000_0000_0000,
        ;
    }
    (dx as i128) * (dx as i128) + (dy as i128) * (dy as i128)
}

/// The grab threshold, squared; fits comfortably in 64 bits.
fn threshold_sq_exec() -> (r: i128)
    ensures
        r == near_threshold_sq(),
{
    proof {
        assert((NEAR_THRESHOLD as int) * (NEAR_THRESHOLD as int) == 1717986918400)
            by (nonlinear_arith)
            requires
                NEAR_THRESHOLD == 1310720,
        ;
    }
    1717986918400
}

} // verus!
