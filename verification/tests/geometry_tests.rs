use moonshine_core::geometry::{saturating_add_i32, saturating_sub_i32, Point, Rect};

#[test]
fn saturating_add_in_range() {
    assert_eq!(saturating_add_i32(3, -5), -2);
}

#[test]
fn saturating_add_clamps_both_ways() {
    assert_eq!(saturating_add_i32(i32::MAX, 1), i32::MAX);
    assert_eq!(saturating_add_i32(i32::MIN, -1), i32::MIN);
}

#[test]
fn saturating_sub_clamps_both_ways() {
    assert_eq!(saturating_sub_i32(i32::MIN, 1), i32::MIN);
    assert_eq!(saturating_sub_i32(i32::MAX, -1), i32::MAX);
    assert_eq!(saturating_sub_i32(10, 4), 6);
}

#[test]
fn point_arithmetic_is_componentwise() {
    let p = Point::new(10, 20).plus(Point::new(1, -2)).minus(Point::new(5, 5));
    assert_eq!(p, Point::new(6, 13));
    assert_eq!(Point::origin(), Point::new(0, 0));
}

#[test]
fn point_arithmetic_saturates() {
    let p = Point::new(i32::MAX, i32::MIN).plus(Point::new(1, -1));
    assert_eq!(p, Point::new(i32::MAX, i32::MIN));
}

#[test]
fn rect_new_keeps_fields() {
    let r = Rect::new(Point::new(1, 2), Point::new(3, 4));
    assert_eq!(r.loc, Point::new(1, 2));
    assert_eq!(r.size, Point::new(3, 4));
}
