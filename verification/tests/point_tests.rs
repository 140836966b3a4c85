use chaikin::point::{Point, Vec2};

/// One whole coordinate unit of the library's fixed-point scale.
const FX: i64 = 65536;

#[test]
fn point_test_point_new() {
    let point = Point::new(1 * FX, 2 * FX);
    assert_eq!(point.position, Vec2::new(1 * FX, 2 * FX));
    assert_eq!(point.color, (255, 255, 255));
}

#[test]
fn point_test_point_with_color() {
    let color = (100, 150, 200);
    let point = Point::with_color(3 * FX, 4 * FX, color);
    assert_eq!(point.position, Vec2::new(3 * FX, 4 * FX));
    assert_eq!(point.color, color);
}

#[test]
fn point_test_test_point_new() {
    let point = Point::new(1 * FX, 2 * FX);
    assert_eq!(point.position, Vec2::new(1 * FX, 2 * FX));
    assert_eq!(point.color, (255, 255, 255));
}

#[test]
fn point_test_test_point_with_color() {
    let color = (100, 150, 200);
    let point = Point::with_color(3 * FX, 4 * FX, color);
    assert_eq!(point.position, Vec2::new(3 * FX, 4 * FX));
    assert_eq!(point.color, color);
}
