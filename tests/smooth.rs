use area_clicker::geometry::Point;
use area_clicker::smooth::smooth_point;

#[test]
fn smooth_move_starts_and_ends_exactly() {
    let a = Point::new(0, 0);
    let b = Point::new(100, 50);
    assert_eq!(smooth_point(a, b, 0, 1_000_000, false), a);
    assert_eq!(smooth_point(a, b, 1_000_000, 1_000_000, true), b);
    assert_eq!(smooth_point(a, b, 5_000_000, 1_000_000, true), b);
    assert_eq!(smooth_point(a, b, 0, 0, true), b);
}

#[test]
fn smooth_move_is_eased() {
    let a = Point::new(0, 0);
    let b = Point::new(100, 50);
    assert_eq!(smooth_point(a, b, 500_000, 1_000_000, false), Point::new(50, 25));
    // a quarter of the time covers only 6% of the way
    assert_eq!(smooth_point(a, b, 250_000, 1_000_000, false), Point::new(6, 3));
}

#[test]
fn smooth_move_tremor_is_sub_pixel() {
    let a = Point::new(0, 0);
    let b = Point::new(1, 0);
    assert_eq!(smooth_point(a, b, 507_500, 1_000_000, false), Point::new(1, 0));
    assert_eq!(smooth_point(a, b, 507_500, 1_000_000, true), Point::new(0, 0));
}
