use chaikin::chaikin::Chaikin;
use chaikin::fixed::{fixed_scale, lerp_coord, FIXED_ONE};
use chaikin::input::{InputHandler, InputSnapshot};
use chaikin::point::{Point, Vec2};

/// One whole coordinate unit of the library's fixed-point scale.
const FX: i64 = 65536;

/// Half of one animation unit.
const HALF: i64 = 32768;

fn point(x: i64, y: i64) -> Point {
    Point::new(x * FX, y * FX)
}

fn idle_snapshot() -> InputSnapshot {
    InputSnapshot {
        mouse_pos: None,
        mouse_down: false,
        escape_down: false,
        enter_down: false,
        space_down: false,
    }
}

#[test]
fn refine_two_points_cuts_the_segment_at_quarter_marks() {
    let input = vec![point(0, 0), point(10, 10)];
    let chaikin = Chaikin::new(input.clone());
    let output = chaikin.apply_chaikin(&input);
    // Endpoints keep their tags; the two generated points sit at one
    // quarter and three quarters of the segment, in that order.
    assert_eq!(output.len(), 4);
    assert_eq!(output[0], input[0]);
    assert_eq!(output[3], input[1]);
    assert_eq!(output[1].position, Vec2::new(5 * FX / 2, 5 * FX / 2));
    assert_eq!(output[2].position, Vec2::new(15 * FX / 2, 15 * FX / 2));
    assert_eq!(output[1].color, (255, 255, 255));
    assert_eq!(output[2].color, (255, 255, 255));
}

#[test]
fn refine_returns_short_inputs_unchanged() {
    let chaikin = Chaikin::new(vec![]);
    let empty: Vec<Point> = vec![];
    assert_eq!(chaikin.apply_chaikin(&empty), empty);
    let single = vec![point(4, 5)];
    assert_eq!(chaikin.apply_chaikin(&single), single);
}

#[test]
fn refine_keeps_endpoints_across_levels() {
    let input = vec![point(0, 0), point(5, 9), point(10, 0)];
    let chaikin = Chaikin::new(input.clone());
    let mut level = input.clone();
    for _ in 0..3 {
        let next = chaikin.apply_chaikin(&level);
        assert_eq!(next.len(), 2 * (level.len() - 1) + 2);
        assert_eq!(next.first().unwrap().position, input[0].position);
        assert_eq!(next.last().unwrap().position, input[2].position);
        level = next;
    }
}

#[test]
fn unequal_interpolation_blends_halfway_against_the_sparse_bracket() {
    let mut chaikin = Chaikin::new(vec![]);
    chaikin.current_points = vec![point(0, 0), point(6, 6)];
    chaikin.next_points = vec![point(0, 0), point(2, 2), point(4, 4), point(6, 6)];

    let result = chaikin.interpolate_different_point_counts(HALF);
    assert_eq!(result.len(), 4);
    // Endpoints interpolate directly (and coincide here).
    assert_eq!(result[0].position, Vec2::new(0, 0));
    assert_eq!(result[3].position, Vec2::new(6 * FX, 6 * FX));
    // Interior points of the denser side blend halfway towards the
    // virtual position on the two-point bracket of the sparser side.
    assert_eq!(result[1].position, Vec2::new(131071, 131071));
    assert_eq!(result[2].position, Vec2::new(262142, 262142));
}

#[test]
fn interpolating_a_level_with_itself_moves_nothing() {
    let pts = vec![point(1, 2), point(3, 4), point(5, 6)];
    let mut chaikin = Chaikin::new(vec![]);
    chaikin.current_points = pts.clone();
    chaikin.next_points = pts.clone();
    for t in [0, 1, HALF, FIXED_ONE - 1, FIXED_ONE] {
        let result = chaikin.interpolate(t);
        assert_eq!(result.len(), pts.len());
        for (r, p) in result.iter().zip(pts.iter()) {
            assert_eq!(r.position, p.position);
        }
    }
}

#[test]
fn equal_length_interpolation_carries_the_fixed_neutral_tag() {
    let mut chaikin = Chaikin::new(vec![]);
    chaikin.current_points = vec![
        Point::with_color(0, 0, (9, 9, 9)),
        Point::with_color(2 * FX, 2 * FX, (1, 2, 3)),
    ];
    chaikin.next_points = vec![point(2, 2), point(4, 4)];
    let result = chaikin.interpolate(HALF);
    // Tags are not blended and not copied: every blended point carries
    // the fixed neutral tag.
    assert_eq!(result[0].color, (255, 255, 255));
    assert_eq!(result[1].color, (255, 255, 255));
    assert_eq!(result[0].position, Vec2::new(1 * FX, 1 * FX));
}

#[test]
fn a_whole_cycle_of_oversized_ticks_still_returns_to_the_original() {
    // Every tick crosses a level boundary, the very first one included:
    // after exactly seven crossings the original polyline is back.
    let input = vec![point(0, 0), point(10, 10)];
    let mut chaikin = Chaikin::new(input.clone());
    for _ in 0..7 {
        chaikin.step(FIXED_ONE);
    }
    assert_eq!(chaikin.current_step, 0);
    assert_eq!(chaikin.current_points, input);
}

#[test]
fn interpolation_with_an_empty_side_returns_the_other() {
    let pts = vec![point(1, 1), point(2, 2)];
    let mut chaikin = Chaikin::new(vec![]);
    chaikin.current_points = pts.clone();
    chaikin.next_points = vec![];
    assert_eq!(chaikin.interpolate(HALF), pts);
    chaikin.current_points = vec![];
    chaikin.next_points = pts.clone();
    assert_eq!(chaikin.interpolate(HALF), pts);
}

#[test]
fn interpolation_at_the_ends_reproduces_each_side() {
    let mut chaikin = Chaikin::new(vec![]);
    chaikin.current_points = vec![point(0, 0), point(4, 0)];
    chaikin.next_points = vec![point(0, 2), point(4, 6)];
    let at_zero = chaikin.interpolate(0);
    assert_eq!(at_zero[0].position, Vec2::new(0, 0));
    assert_eq!(at_zero[1].position, Vec2::new(4 * FX, 0));
    let at_one = chaikin.interpolate(FIXED_ONE);
    assert_eq!(at_one[0].position, Vec2::new(0, 2 * FX));
    assert_eq!(at_one[1].position, Vec2::new(4 * FX, 6 * FX));
}

#[test]
fn seven_level_advances_cycle_back_to_the_original() {
    let input = vec![point(0, 0), point(10, 0), point(10, 10)];
    let mut chaikin = Chaikin::new(input.clone());
    // A first tick without elapsed time computes the first refinement.
    chaikin.step(0);
    assert_eq!(chaikin.current_points, input);
    assert_eq!(chaikin.current_step, 0);
    // Each full-unit tick crosses one level boundary.
    let mut lengths = Vec::new();
    for _ in 0..7 {
        chaikin.step(FIXED_ONE);
        lengths.push(chaikin.current_points.len());
    }
    assert_eq!(lengths, vec![6, 12, 24, 48, 96, 192, 3]);
    assert_eq!(chaikin.current_step, 0);
    assert_eq!(chaikin.current_points, input);
}

#[test]
fn step_with_fewer_than_two_points_returns_them_unchanged() {
    let input = vec![point(3, 4)];
    let mut chaikin = Chaikin::new(input.clone());
    let frame = chaikin.step(FIXED_ONE);
    assert_eq!(frame, input);
    assert_eq!(chaikin.current_step, 0);
    assert_eq!(chaikin.animation_progress, 0);
}

#[test]
fn step_frame_lists_control_points_before_curve_points() {
    let input = vec![point(0, 0), point(8, 0)];
    let mut chaikin = Chaikin::new(input.clone());
    let frame = chaikin.step(0);
    // Current level has 2 points, the next refinement 4: the frame holds
    // the 2 control points and then the 4 interpolated points.
    assert_eq!(frame.len(), 6);
    assert_eq!(frame[0].color, (255, 0, 0));
    assert_eq!(frame[1].color, (255, 0, 0));
    assert_eq!(frame[0].position, input[0].position);
    assert_eq!(frame[1].position, input[1].position);
    for p in &frame[2..] {
        assert_eq!(p.color, (0, 255, 0));
    }
    // At progress zero the curve endpoints sit on the control endpoints.
    assert_eq!(frame[2].position, input[0].position);
    assert_eq!(frame[5].position, input[1].position);
}

#[test]
fn set_points_with_a_different_tag_resets_too() {
    let mut chaikin = Chaikin::new(vec![point(1, 1)]);
    chaikin.animation_progress = HALF;
    // Same position, different tag: structural inequality, so a reset.
    chaikin.set_points(vec![Point::with_color(1 * FX, 1 * FX, (9, 9, 9))]);
    assert_eq!(chaikin.animation_progress, 0);
}

#[test]
fn lerp_coord_edge_values() {
    assert_eq!(lerp_coord(0, 100, 0), 0);
    assert_eq!(lerp_coord(0, 100, FIXED_ONE), 100);
    assert_eq!(lerp_coord(7, 7, 12345), 7);
    // The quotient rounds towards the first endpoint, on either side.
    assert_eq!(lerp_coord(0, 3, HALF), 1);
    assert_eq!(lerp_coord(0, -3, HALF), -1);
    assert_eq!(lerp_coord(-100, 100, HALF), 0);
}

#[test]
fn fixed_scale_multiplies_and_rounds_down() {
    assert_eq!(fixed_scale(FIXED_ONE, FIXED_ONE), FIXED_ONE);
    assert_eq!(fixed_scale(3, HALF), 1);
    assert_eq!(fixed_scale(0, FIXED_ONE), 0);
}

#[test]
fn nearest_point_prefers_the_first_of_equals() {
    let mut handler = InputHandler::new();
    handler.add_point(0, 0);
    handler.add_point(2 * FX, 0);
    handler.mouse_pos = (1 * FX, 0);
    assert_eq!(handler.find_nearest_point(), Some(0));
}

#[test]
fn enter_without_points_raises_the_prompt() {
    let mut handler = InputHandler::new();
    let ev = InputSnapshot { enter_down: true, ..idle_snapshot() };
    handler.handle_input(ev);
    assert_eq!(
        handler.message(),
        Some("Please draw control points first!\nPress Enter to continue")
    );
    assert!(!handler.is_animating());
}

#[test]
fn enter_with_points_starts_the_animation() {
    let mut handler = InputHandler::new();
    handler.add_point(1 * FX, 1 * FX);
    let ev = InputSnapshot { enter_down: true, ..idle_snapshot() };
    handler.handle_input(ev);
    assert!(handler.is_animating());
    assert_eq!(handler.message(), None);
}

#[test]
fn space_clears_points_and_stops_the_animation() {
    let mut handler = InputHandler::new();
    handler.add_point(1 * FX, 1 * FX);
    handler.is_animating = true;
    let ev = InputSnapshot { space_down: true, ..idle_snapshot() };
    handler.handle_input(ev);
    assert!(handler.points().is_empty());
    assert!(!handler.is_animating());
}

#[test]
fn escape_requests_closing() {
    let mut handler = InputHandler::new();
    let ev = InputSnapshot { escape_down: true, ..idle_snapshot() };
    handler.handle_input(ev);
    assert!(handler.should_close());
}

#[test]
fn a_click_adds_a_point_and_a_drag_moves_one() {
    let mut handler = InputHandler::new();
    // Press: adds a point at the pointer.
    let press = InputSnapshot {
        mouse_pos: Some((10 * FX, 10 * FX)),
        mouse_down: true,
        ..idle_snapshot()
    };
    handler.handle_input(press);
    assert_eq!(handler.points(), &[(10 * FX, 10 * FX)]);
    // Holding: the press grabs the nearby point and drags it along.
    let drag = InputSnapshot {
        mouse_pos: Some((12 * FX, 10 * FX)),
        mouse_down: true,
        ..idle_snapshot()
    };
    handler.handle_input(drag);
    assert_eq!(handler.dragging_point(), Some(0));
    assert_eq!(handler.points(), &[(12 * FX, 10 * FX)]);
    // Release: the grab ends.
    handler.handle_input(idle_snapshot());
    assert_eq!(handler.dragging_point(), None);
    assert_eq!(handler.points(), &[(12 * FX, 10 * FX)]);
}

#[test]
fn the_key_cooldown_mutes_a_held_key() {
    let mut handler = InputHandler::new();
    handler.add_point(1 * FX, 1 * FX);
    let ev = InputSnapshot { enter_down: true, ..idle_snapshot() };
    handler.handle_input(ev);
    assert!(handler.is_animating());
    handler.is_animating = false;
    // The key is still held, but the cooldown mutes it.
    handler.handle_input(ev);
    assert!(!handler.is_animating());
    for _ in 0..20 {
        handler.handle_input(ev);
    }
    // After the cooldown ran out the held key registers again.
    assert!(handler.is_animating());
}
