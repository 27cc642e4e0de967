use fundamentals::functions::{
    add_two_nums, factorial, min_max, multiply, square, SQUARED_VALUE_OF_FOUR,
};
use fundamentals::numbers::{add_or_max, add_with_all_policies, u8_from_i32};
use fundamentals::shadowing::{multi_shadow, shadowing};

#[test]
fn add_returns_the_sum() {
    assert_eq!(add_two_nums(2, 3), 5);
    assert_eq!(add_two_nums(0, 0), 0);
    assert_eq!(add_two_nums(u32::MAX - 1, 1), u32::MAX);
}

#[test]
fn multiply_returns_the_product() {
    assert_eq!(multiply(6, 7), 42);
    assert_eq!(multiply(-6, 7), -42);
    assert_eq!(multiply(-6, -7), 42);
    assert_eq!(multiply(0, i32::MAX), 0);
}

#[test]
fn min_max_orders_the_pair() {
    assert_eq!(min_max(3, -2), (-2, 3));
    assert_eq!(min_max(-2, 3), (-2, 3));
    assert_eq!(min_max(5, 5), (5, 5));
    let (lo, hi) = min_max(i32::MIN, i32::MAX);
    assert!(lo <= hi);
    assert_eq!((lo, hi), (i32::MIN, i32::MAX));
}

#[test]
fn factorial_small_values() {
    assert_eq!(factorial(0), 1);
    assert_eq!(factorial(1), 1);
    assert_eq!(factorial(5), 120);
}

#[test]
fn factorial_largest_fitting_input() {
    assert_eq!(factorial(12), 479_001_600);
}

#[test]
fn square_matches_its_constant() {
    assert_eq!(square(4), SQUARED_VALUE_OF_FOUR);
    assert_eq!(square(-4), SQUARED_VALUE_OF_FOUR);
    assert_eq!(square(0), 0);
    assert_eq!(square(46_340), 2_147_395_600);
}

#[test]
fn addition_policies_on_overflow() {
    let r = add_with_all_policies(200, 100);
    assert_eq!(r.checked, None);
    assert_eq!(r.wrapping, 44);
    assert_eq!(r.saturating, 255);
    assert_eq!(r.overflowing, 44);
    assert!(r.overflowed);
}

#[test]
fn addition_policies_without_overflow() {
    let r = add_with_all_policies(100, 55);
    assert_eq!(r.checked, Some(155));
    assert_eq!(r.wrapping, 155);
    assert_eq!(r.saturating, 155);
    assert_eq!(r.overflowing, 155);
    assert!(!r.overflowed);
}

#[test]
fn addition_policies_at_the_edge() {
    let r = add_with_all_policies(255, 0);
    assert_eq!(r.checked, Some(255));
    let r = add_with_all_policies(255, 1);
    assert_eq!(r.checked, None);
    assert_eq!(r.wrapping, 0);
    assert_eq!(r.saturating, 255);
}

#[test]
fn narrowing_conversion() {
    assert_eq!(u8_from_i32(1000), None);
    assert_eq!(u8_from_i32(-1), None);
    assert_eq!(u8_from_i32(0), Some(0));
    assert_eq!(u8_from_i32(255), Some(255));
    assert_eq!(u8_from_i32(256), None);
}

#[test]
fn manual_overflow_check() {
    assert_eq!(add_or_max(250, 20), 255);
    assert_eq!(add_or_max(250, 5), 255);
    assert_eq!(add_or_max(250, 4), 254);
}

#[test]
fn shadowed_rebinding_adds_one() {
    assert_eq!(shadowing(5), 6);
    assert_eq!(shadowing(-1), 0);
}

#[test]
fn nested_shadowing_levels() {
    assert_eq!(multi_shadow(1), (2, 20, 2, 1));
    assert_eq!(multi_shadow(0), (1, 10, 1, 0));
}
