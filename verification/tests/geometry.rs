use dui_core::geometry::{
    add_units, floor_div, half_units, max_units, min_units, mul_div, narrow, neg_units, sub_units,
    Insets, Rect, ScaleFactor, Size, Translation,
};

#[test]
fn sums_stop_at_the_ends_of_the_range() {
    assert_eq!(add_units(i64::MAX, 1), i64::MAX);
    assert_eq!(add_units(i64::MIN, -1), i64::MIN);
    assert_eq!(sub_units(i64::MIN, 1), i64::MIN);
    assert_eq!(sub_units(i64::MAX, -1), i64::MAX);
    assert_eq!(add_units(20, 5), 25);
    assert_eq!(sub_units(20, 25), -5);
}

#[test]
fn halves_round_down() {
    assert_eq!(half_units(100), 50);
    assert_eq!(half_units(11), 5);
    assert_eq!(half_units(-1), -1);
    assert_eq!(half_units(-3), -2);
    assert_eq!(half_units(i64::MIN), i64::MIN / 2);
}

#[test]
fn scale_factor_needs_a_denominator() {
    assert!(ScaleFactor::new(3, 0).is_none());
    assert!(ScaleFactor::new(3, 2).is_some());
}

#[test]
fn scaling_rounds_down() {
    let half_again = ScaleFactor::new(3, 2).unwrap();
    assert_eq!(half_again.apply(10), 15);
    assert_eq!(half_again.apply(5), 7);
    assert_eq!(half_again.apply(-5), -8);
    assert_eq!(ScaleFactor::whole(2).apply(21), 42);
    assert_eq!(ScaleFactor::whole(2).apply(i64::MAX), i64::MAX);
}

#[test]
fn size_is_clamped_to_min_then_max() {
    let this = Size::new(0, 100);
    let clamped = this.clamp(Size::new(10, 10), Size::new(50, 50));
    assert_eq!(clamped, Size::new(10, 50));
}

#[test]
fn rect_shrinks_and_grows_by_insets() {
    let rect = Rect::new(0, 0, 100, 80);
    let edges = Insets::new(1, 2, 3, 4);
    assert_eq!(rect.shrink(&edges), Rect::new(1, 2, 97, 76));
    assert_eq!(rect.shrink(&edges).grow(&edges), rect);
    assert_eq!(rect.width(), 100);
    assert_eq!(rect.height(), 80);
}

#[test]
fn rect_from_origin_and_size_is_put_in_order() {
    assert_eq!(Rect::from_origin_size(5, 5, Size::new(10, 20)), Rect::new(5, 5, 15, 25));
    assert_eq!(Rect::from_origin_size(5, 5, Size::new(-10, 20)), Rect::new(-5, 5, 5, 25));
}

#[test]
fn insets_and_sizes_from_plain_numbers() {
    assert_eq!(Insets::from(5), Insets::uniform(5));
    assert_eq!(Insets::from((1, 2)), Insets::new(1, 2, 1, 2));
    assert_eq!(Size::from((3, 4)), Size::new(3, 4));
    let edges: Insets = 7.into();
    assert_eq!(edges, Insets::new(7, 7, 7, 7));
}

#[test]
fn products_over_a_divisor_round_down_and_stay_in_range() {
    assert_eq!(mul_div(7, 3, 2), 10);
    assert_eq!(mul_div(-7, 3, 2), -11);
    assert_eq!(mul_div(i64::MAX, i64::MAX, 1), i64::MAX);
    assert_eq!(mul_div(i64::MIN, i64::MAX, 1), i64::MIN);
    assert_eq!(floor_div(7, 2), 3);
    assert_eq!(floor_div(-7, 2), -4);
    assert_eq!(floor_div(-8, 2), -4);
    assert_eq!(narrow(i128::MAX), i64::MAX);
    assert_eq!(narrow(i128::MIN), i64::MIN);
    assert_eq!(narrow(-12), -12);
    assert_eq!(neg_units(5), -5);
    assert_eq!(neg_units(i64::MIN), i64::MAX);
    assert_eq!(max_units(3, -4), 3);
    assert_eq!(min_units(3, -4), -4);
}

#[test]
fn extents_of_a_rectangle() {
    let rect = Rect::new(10, 20, 40, 25);
    assert_eq!(rect.size(), Size::new(30, 5));
    assert_eq!(Rect::new(40, 25, 10, 20).width(), -30);
    assert_eq!(Rect::new(i64::MIN, 0, i64::MAX, 0).width(), i64::MAX);
    assert_eq!(Rect::zero(), Rect::new(0, 0, 0, 0));
    assert_eq!(Translation::identity(), Translation { dx: 0, dy: 0 });
    let edges = Insets::new(1, 2, 3, 4).scale(&ScaleFactor::new(5, 2).unwrap());
    assert_eq!(edges, Insets::new(2, 5, 7, 10));
}
