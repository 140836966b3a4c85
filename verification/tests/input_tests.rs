use chaikin::input::InputHandler;

/// One whole coordinate unit of the library's fixed-point scale.
const FX: i64 = 65536;

#[test]
fn input_test_new_initializes_correctly() {
    let handler = InputHandler::new();
    assert!(handler.points().is_empty());
    assert!(!handler.is_animating());
    assert!(!handler.should_close());
    assert_eq!(handler.dragging_point(), None);
    assert_eq!(handler.message(), None);
}

#[test]
fn input_test_add_point_and_get_points() {
    let mut handler = InputHandler::new();
    handler.add_point(100 * FX, 200 * FX);
    assert_eq!(handler.points(), &[(100 * FX, 200 * FX)]);
}

#[test]
fn input_test_clear_message() {
    let mut handler = InputHandler::new();
    handler.add_point(1 * FX, 1 * FX); // trigger non-empty points
    handler.clear_message(); // should be safe even if message is None
    assert_eq!(handler.message(), None);
}

#[test]
fn input_test_find_nearest_point_returns_closest_index() {
    let mut handler = InputHandler::new();
    handler.add_point(10 * FX, 10 * FX);
    handler.add_point(50 * FX, 50 * FX);
    handler.mouse_pos = (11 * FX, 11 * FX); // very close to first point

    let idx = handler.find_nearest_point();
    assert_eq!(idx, Some(0));
}

#[test]
fn input_test_find_nearest_point_returns_none_if_too_far() {
    let mut handler = InputHandler::new();
    handler.add_point(10 * FX, 10 * FX);
    handler.mouse_pos = (100 * FX, 100 * FX); // too far

    let idx = handler.find_nearest_point();
    assert_eq!(idx, None);
}

#[test]
fn input_test_test_new_initializes_correctly() {
    let handler = InputHandler::new();
    assert!(handler.points().is_empty());
    assert!(!handler.is_animating());
    assert!(!handler.should_close());
    assert_eq!(handler.dragging_point(), None);
    assert_eq!(handler.message(), None);
}

#[test]
fn input_test_test_add_point_and_get_points() {
    let mut handler = InputHandler::new();
    handler.add_point(100 * FX, 200 * FX);
    assert_eq!(handler.points(), &[(100 * FX, 200 * FX)]);
}

#[test]
fn input_test_test_clear_message() {
    let mut handler = InputHandler::new();
    handler.add_point(1 * FX, 1 * FX); // trigger non-empty points
    handler.clear_message(); // should be safe even if message is None
    assert_eq!(handler.message(), None);
}

#[test]
fn input_test_test_find_nearest_point_returns_closest_index() {
    let mut handler = InputHandler::new();
    handler.add_point(10 * FX, 10 * FX);
    handler.add_point(50 * FX, 50 * FX);
    handler.mouse_pos = (11 * FX, 11 * FX); // very close to first point

    let idx = handler.find_nearest_point();
    assert_eq!(idx, Some(0));
}

#[test]
fn input_test_test_find_nearest_point_returns_none_if_too_far() {
    let mut handler = InputHandler::new();
    handler.add_point(10 * FX, 10 * FX);
    handler.mouse_pos = (100 * FX, 100 * FX); // too far

    let idx = handler.find_nearest_point();
    assert_eq!(idx, None);
}
