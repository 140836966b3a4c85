use chaikin::chaikin::Chaikin;
use chaikin::point::{Point, Vec2};

/// One whole coordinate unit of the library's fixed-point scale.
const FX: i64 = 65536;

/// Half of one animation unit.
const HALF: i64 = 32768;

fn point(x: i64, y: i64) -> Point {
    Point::new(x * FX, y * FX)
}

#[test]
fn chaikin_test_test_new_initializes_correctly() {
    let input = vec![point(0, 0), point(10, 10)];
    let chaikin = Chaikin::new(input.clone());
    assert_eq!(chaikin.original_points, input);
    assert_eq!(chaikin.current_points, input);
    assert!(chaikin.next_points.is_empty());
    assert_eq!(chaikin.animation_progress, 0);
    assert_eq!(chaikin.current_step, 0);
}

#[test]
fn test_apply_chaikin_generates_correct_number_of_points() {
    let input = vec![point(0, 0), point(10, 10)];
    let chaikin = Chaikin::new(input.clone());

    let output = chaikin.apply_chaikin(&input);
    // Should have original endpoints + 2 new points per segment
    assert_eq!(output.len(), 4);
}

#[test]
fn test_interpolate_same_length() {
    let mut chaikin = Chaikin::new(vec![]);
    chaikin.current_points = vec![point(0, 0), point(2, 2)];
    chaikin.next_points = vec![point(2, 2), point(4, 4)];

    let result = chaikin.interpolate(HALF);
    assert_eq!(result.len(), 2);
    assert_eq!(result[0].position, Vec2::new(1 * FX, 1 * FX));
    assert_eq!(result[1].position, Vec2::new(3 * FX, 3 * FX));
}

#[test]
fn test_interpolate_different_point_counts_more_current() {
    let mut chaikin = Chaikin::new(vec![]);
    chaikin.current_points = vec![point(0, 0), point(2, 2), point(4, 4), point(6, 6)];
    chaikin.next_points = vec![point(0, 0), point(6, 6)];

    let result = chaikin.interpolate_different_point_counts(HALF);
    assert_eq!(result.first().unwrap().position, Vec2::new(0, 0));
    assert_eq!(result.last().unwrap().position, Vec2::new(6 * FX, 6 * FX));
}

#[test]
fn test_interpolate_different_point_counts_more_next() {
    let mut chaikin = Chaikin::new(vec![]);
    chaikin.current_points = vec![point(0, 0), point(6, 6)];
    chaikin.next_points = vec![point(0, 0), point(2, 2), point(4, 4), point(6, 6)];

    let result = chaikin.interpolate_different_point_counts(HALF);
    assert_eq!(result.first().unwrap().position, Vec2::new(0, 0));
    assert_eq!(result.last().unwrap().position, Vec2::new(6 * FX, 6 * FX));
}

#[test]
fn test_create_visualization_adds_colors() {
    let input = vec![point(1, 1), point(2, 2)];
    let chaikin = Chaikin::new(vec![point(0, 0)]);
    let result = chaikin.create_visualization(input.clone());

    assert_eq!(result.len(), 3);
    assert_eq!(result[0].color, (255, 0, 0)); // original
    assert_eq!(result[1].color, (0, 255, 0)); // interpolated
    assert_eq!(result[2].color, (0, 255, 0)); // interpolated
}

#[test]
fn test_set_points_resets_state() {
    let mut chaikin = Chaikin::new(vec![point(1, 1)]);
    chaikin.animation_progress = HALF;
    chaikin.current_step = 3;

    chaikin.set_points(vec![point(2, 2)]);

    assert_eq!(chaikin.original_points.len(), 1);
    assert_eq!(chaikin.original_points[0].position, Vec2::new(2 * FX, 2 * FX));
    assert_eq!(chaikin.animation_progress, 0);
    assert_eq!(chaikin.current_step, 0);
}

#[test]
fn test_set_points_does_nothing_if_same() {
    let original = vec![point(3, 3)];
    let mut chaikin = Chaikin::new(original.clone());

    chaikin.animation_progress = 45875;
    chaikin.set_points(original.clone());

    // Should not reset
    assert_eq!(chaikin.animation_progress, 45875);
}
